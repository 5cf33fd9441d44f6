//! The two component services: one in front of a remote registry, one in
//! front of a local directory. Each owns a cache of compiled components
//! and a cache of metadata, and decides how a call proceeds. The work that
//! a decision asks for is done by the caller.

use vstd::prelude::*;
use vstd::string::*;
use crate::cache::{
    complete_step, index_of, is_cached, request_step, Cache, CacheState, Completion, Lookup,
};
use crate::cache_laws::{lemma_request, lemma_stored_value_hits};
use crate::error::GolemError;
use crate::ident::{hyphenated, uuid_of_text};
use crate::local::{
    base_name, candidate, file_prefix, find_component_files, is_choice, json_extension,
    no_choice, not_found_reason, ComponentFiles,
};
use crate::metadata::{ComponentMetadata, ComponentMetadataView};
use crate::metadata_fetch::{MetadataAction, MetadataActionView, MetadataFetch, MetadataFetchState};
use crate::model::{ComponentId, ComponentKey, ComponentVersion, LinearMemory};
use crate::properties::{local_metadata, ComponentProperties};
use crate::producer::{Producer, ProducerAction, ProducerActionView, ProducerState};
use crate::retry::RetryConfig;

verus! {

/// Every so many milliseconds the idle entries of a cache are swept.
pub const SWEEP_PERIOD_MILLIS: u64 = 60000;

/// The bounds of the two caches of a component service.
#[derive(Debug, Clone, Copy, PartialEq, Eq, Structural)]
pub struct ComponentCacheConfig {
    pub max_capacity: usize,
    pub max_metadata_capacity: usize,
    /// In milliseconds.
    pub time_to_idle: u64,
}

/// Where the remote registry is and how it is talked to.
#[derive(Debug, Clone, PartialEq, Eq)]
pub struct ComponentServiceGrpcConfig {
    pub url: String,
    pub access_token: String,
    pub retries: RetryConfig,
    pub max_component_size: usize,
}

/// Where the local components are.
#[derive(Debug, Clone, PartialEq, Eq)]
pub struct ComponentServiceLocalConfig {
    pub root: String,
}

/// Which component service to set up.
#[derive(Debug, Clone, PartialEq, Eq)]
pub enum ComponentServiceConfig {
    Grpc(ComponentServiceGrpcConfig),
    Local(ComponentServiceLocalConfig),
}

/// An empty cache of compiled components.
pub fn create_component_cache<A>(max_capacity: usize, time_to_idle: u64) -> (r: Cache<A>)
    ensures
        r@ == (CacheState::<A> { capacity: max_capacity, time_to_idle, entries: Seq::empty() }),
        r.wf(),
{
    Cache::new(max_capacity, time_to_idle)
}

/// An empty cache of metadata.
pub fn create_component_metadata_cache<E>(max_capacity: usize, time_to_idle: u64) -> (r: Cache<
    ComponentMetadata<E>,
>)
    ensures
        r@ == (CacheState::<ComponentMetadata<E>> {
            capacity: max_capacity,
            time_to_idle,
            entries: Seq::empty(),
        }),
        r.wf(),
{
    Cache::new(max_capacity, time_to_idle)
}

/// The value of the header that authorises a request to the registry: the
/// word `Bearer`, a blank and the access token as text.
pub fn bearer_token(access_token: u128) -> (r: String)
    ensures
        r@ == "Bearer "@ + hyphenated(access_token),
{
    String::from_str("Bearer ").concat(ComponentId(access_token).to_string().as_str())
}

/// How a call for a compiled component proceeds.
#[derive(Debug)]
pub enum ComponentLookup<A> {
    /// The component is in the cache.
    Cached,
    /// Somebody computes the component: the caller waits for that outcome.
    Await,
    /// The caller computes the component, and starts with the given step.
    Compute { producer: Producer, first: ProducerAction<A> },
}

/// How a call for metadata proceeds.
#[derive(Debug)]
pub enum MetadataLookup<E> {
    /// The metadata is in the cache under the given key.
    Cached { key: ComponentKey },
    /// Somebody fetches the metadata: the caller waits for that outcome.
    Await { key: ComponentKey },
    /// The caller fetches the metadata of the version of the key, starting
    /// with the given step, and reports the outcome under the key.
    Fetch { key: ComponentKey, fetch: MetadataFetch, first: MetadataAction<E> },
    /// The caller fetches the metadata of the latest version, starting with
    /// the given step; the cache is looked at only afterwards.
    FetchLatest { fetch: MetadataFetch, first: MetadataAction<E> },
}

/// What became of metadata that was fetched for the latest version.
#[derive(Debug, Clone, Copy, PartialEq, Eq, Structural)]
pub enum LatestOutcome {
    /// The cache holds metadata of that version already, which stands.
    Existing,
    /// Somebody fetches the metadata of that version: the caller waits for
    /// that outcome.
    Await,
    /// The metadata is in the cache now and goes to the callers that were
    /// waiting for it. Where the cache was full, the least recently used
    /// metadata has left it.
    Stored { waiters: u64, evicted: Option<ComponentKey> },
}

/// The way a call for a compiled component proceeds after the cache has
/// given its answer.
pub open spec fn component_lookup_matches<A>(
    r: ComponentLookup<A>,
    answer: Lookup,
    key: ComponentKey,
    retries: RetryConfig,
) -> bool {
    match answer {
        Lookup::Hit => r is Cached,
        Lookup::Wait => r is Await,
        Lookup::Lead => r matches ComponentLookup::Compute { producer, first } && producer.key()
            == key && producer.retries() == retries && producer.state()
            == ProducerState::ProbingStore && first@ == ProducerActionView::<A>::ProbeStore,
    }
}

/// The way a call for the metadata of a given version proceeds after the
/// cache has given its answer.
pub open spec fn metadata_lookup_matches<E>(
    r: MetadataLookup<E>,
    answer: Lookup,
    key: ComponentKey,
    retries: RetryConfig,
) -> bool {
    match answer {
        Lookup::Hit => r matches MetadataLookup::Cached { key: k } && k == key,
        Lookup::Wait => r matches MetadataLookup::Await { key: k } && k == key,
        Lookup::Lead => r matches MetadataLookup::Fetch { key: k, fetch, first } && k == key
            && fetch.component_id() == key.component_id && fetch.retries() == retries
            && fetch.state() == (MetadataFetchState::Fetching { attempts: 1 }) && first@
            == MetadataActionView::<E>::Fetch,
    }
}

/// The cache of metadata after metadata of the latest version has been
/// offered to it under the key of that version, and what became of the
/// metadata.
pub open spec fn latest_step<E>(
    s: CacheState<ComponentMetadata<E>>,
    key: ComponentKey,
    metadata: ComponentMetadata<E>,
    now: u64,
) -> (CacheState<ComponentMetadata<E>>, LatestOutcome) {
    let (asked, answer) = request_step(s, key, now);
    match answer {
        Lookup::Hit => (asked, LatestOutcome::Existing),
        Lookup::Wait => (asked, LatestOutcome::Await),
        Lookup::Lead => {
            let (stored, completion) = complete_step(asked, key, Some(metadata), now);
            (
                stored,
                match completion {
                    Completion::Stored { waiters, evicted } => LatestOutcome::Stored {
                        waiters,
                        evicted,
                    },
                    _ => LatestOutcome::Stored { waiters: 0, evicted: None },
                },
            )
        },
    }
}

fn lookup_component<A>(
    cache: &mut Cache<A>,
    key: ComponentKey,
    retries: RetryConfig,
    now: u64,
) -> (r: ComponentLookup<A>)
    requires
        old(cache).wf(),
    ensures
        final(cache).wf(),
        final(cache)@ == request_step(old(cache)@, key, now).0,
        component_lookup_matches(r, request_step(old(cache)@, key, now).1, key, retries),
{
    match cache.request(key, now) {
        Lookup::Hit => ComponentLookup::Cached,
        Lookup::Wait => ComponentLookup::Await,
        Lookup::Lead => {
            let (producer, first) = Producer::start(key, retries);
            ComponentLookup::Compute { producer, first }
        },
    }
}

fn lookup_metadata<E>(
    cache: &mut Cache<ComponentMetadata<E>>,
    key: ComponentKey,
    retries: RetryConfig,
    now: u64,
) -> (r: MetadataLookup<E>)
    requires
        old(cache).wf(),
    ensures
        final(cache).wf(),
        final(cache)@ == request_step(old(cache)@, key, now).0,
        metadata_lookup_matches(r, request_step(old(cache)@, key, now).1, key, retries),
{
    match cache.request(key, now) {
        Lookup::Hit => MetadataLookup::Cached { key },
        Lookup::Wait => MetadataLookup::Await { key },
        Lookup::Lead => {
            let (fetch, first) = MetadataFetch::start(key.component_id, retries);
            MetadataLookup::Fetch { key, fetch, first }
        },
    }
}

fn offer_latest<E>(
    cache: &mut Cache<ComponentMetadata<E>>,
    component_id: ComponentId,
    metadata: ComponentMetadata<E>,
    now: u64,
) -> (r: LatestOutcome)
    requires
        old(cache).wf(),
    ensures
        final(cache).wf(),
        (final(cache)@, r) == latest_step(
            old(cache)@,
            ComponentKey { component_id, component_version: metadata.version },
            metadata,
            now,
        ),
{
    let key = ComponentKey { component_id, component_version: metadata.version };
    match cache.request(key, now) {
        Lookup::Hit => LatestOutcome::Existing,
        Lookup::Wait => LatestOutcome::Await,
        Lookup::Lead => match cache.complete(key, Some(metadata), now) {
            Completion::Stored { waiters, evicted } => LatestOutcome::Stored { waiters, evicted },
            _ => LatestOutcome::Stored { waiters: 0, evicted: None },
        },
    }
}

/// The component service in front of a remote registry.
#[derive(Debug)]
pub struct ComponentServiceGrpc<A, E> {
    pub component_cache: Cache<A>,
    pub component_metadata_cache: Cache<ComponentMetadata<E>>,
    pub access_token: u128,
    pub retry_config: RetryConfig,
    pub max_component_size: usize,
}

impl<A, E> ComponentServiceGrpc<A, E> {
    /// Both caches are in a state that they can be in.
    pub open spec fn wf(&self) -> bool {
        self.component_cache.wf() && self.component_metadata_cache.wf()
    }

    /// A service with two empty caches.
    pub fn new(
        access_token: u128,
        max_capacity: usize,
        max_metadata_capacity: usize,
        time_to_idle: u64,
        retry_config: RetryConfig,
        max_component_size: usize,
    ) -> (r: Self)
        ensures
            r.wf(),
            r.component_cache@ == (CacheState::<A> {
                capacity: max_capacity,
                time_to_idle,
                entries: Seq::empty(),
            }),
            r.component_metadata_cache@ == (CacheState::<ComponentMetadata<E>> {
                capacity: max_metadata_capacity,
                time_to_idle,
                entries: Seq::empty(),
            }),
            r.access_token == access_token,
            r.retry_config == retry_config,
            r.max_component_size == max_component_size,
    {
        ComponentServiceGrpc {
            component_cache: create_component_cache(max_capacity, time_to_idle),
            component_metadata_cache: create_component_metadata_cache(
                max_metadata_capacity,
                time_to_idle,
            ),
            access_token,
            retry_config,
            max_component_size,
        }
    }

    /// Decides how a call for a compiled component proceeds: the cache of
    /// components is asked for the version, and the caller that is told to
    /// compute fetches the bytes with the retries of this service.
    pub fn get(
        &mut self,
        component_id: &ComponentId,
        component_version: ComponentVersion,
        now: u64,
    ) -> (r: ComponentLookup<A>)
        requires
            old(self).wf(),
        ensures
            final(self).wf(),
            final(self).component_metadata_cache == old(self).component_metadata_cache,
            final(self).access_token == old(self).access_token,
            final(self).retry_config == old(self).retry_config,
            final(self).max_component_size == old(self).max_component_size,
            final(self).component_cache@ == request_step(
                old(self).component_cache@,
                ComponentKey { component_id: *component_id, component_version },
                now,
            ).0,
            component_lookup_matches(
                r,
                request_step(
                    old(self).component_cache@,
                    ComponentKey { component_id: *component_id, component_version },
                    now,
                ).1,
                ComponentKey { component_id: *component_id, component_version },
                old(self).retry_config,
            ),
    {
        let key = ComponentKey { component_id: *component_id, component_version };
        lookup_component(&mut self.component_cache, key, self.retry_config, now)
    }

    /// Decides how a call for metadata proceeds. For a given version the
    /// cache of metadata is asked. Without one the latest metadata is
    /// fetched first, and the cache is left as it is.
    pub fn get_metadata(
        &mut self,
        component_id: &ComponentId,
        forced_version: Option<ComponentVersion>,
        now: u64,
    ) -> (r: MetadataLookup<E>)
        requires
            old(self).wf(),
        ensures
            final(self).wf(),
            final(self).component_cache == old(self).component_cache,
            final(self).access_token == old(self).access_token,
            final(self).retry_config == old(self).retry_config,
            final(self).max_component_size == old(self).max_component_size,
            match forced_version {
                Some(component_version) => {
                    let key = ComponentKey { component_id: *component_id, component_version };
                    &&& final(self).component_metadata_cache@ == request_step(
                        old(self).component_metadata_cache@,
                        key,
                        now,
                    ).0
                    &&& metadata_lookup_matches(
                        r,
                        request_step(old(self).component_metadata_cache@, key, now).1,
                        key,
                        old(self).retry_config,
                    )
                },
                None => {
                    &&& final(self).component_metadata_cache == old(self).component_metadata_cache
                    &&& r matches MetadataLookup::FetchLatest { fetch, first }
                    &&& fetch.component_id() == *component_id
                    &&& fetch.retries() == old(self).retry_config
                    &&& fetch.state() == (MetadataFetchState::Fetching { attempts: 1 })
                    &&& first@ == MetadataActionView::<E>::Fetch
                },
            },
    {
        match forced_version {
            Some(component_version) => {
                let key = ComponentKey { component_id: *component_id, component_version };
                lookup_metadata(&mut self.component_metadata_cache, key, self.retry_config, now)
            },
            None => {
                let (fetch, first) = MetadataFetch::start(*component_id, self.retry_config);
                MetadataLookup::FetchLatest { fetch, first }
            },
        }
    }

    /// Offers metadata that was fetched for the latest version to the
    /// cache, under the key of the version that the metadata states.
    pub fn cache_latest(
        &mut self,
        component_id: &ComponentId,
        metadata: ComponentMetadata<E>,
        now: u64,
    ) -> (r: LatestOutcome)
        requires
            old(self).wf(),
        ensures
            final(self).wf(),
            final(self).component_cache == old(self).component_cache,
            final(self).access_token == old(self).access_token,
            final(self).retry_config == old(self).retry_config,
            final(self).max_component_size == old(self).max_component_size,
            (final(self).component_metadata_cache@, r) == latest_step(
                old(self).component_metadata_cache@,
                ComponentKey { component_id: *component_id, component_version: metadata.version },
                metadata,
                now,
            ),
    {
        offer_latest(&mut self.component_metadata_cache, *component_id, metadata, now)
    }
}

/// The configuration of a computation that fetches its bytes in one try.
pub open spec fn single_try() -> RetryConfig {
    RetryConfig { max_attempts: 0, min_delay: 0, max_delay: 0, multiplier: 0 }
}

/// The files of a component that were picked in a directory.
pub open spec fn picked(
    component_id: ComponentId,
    file_names: Seq<String>,
    forced_version: Option<ComponentVersion>,
    files: ComponentFiles,
) -> bool {
    exists|i: int|
        {
            &&& #[trigger] is_choice(file_prefix(component_id), file_names, forced_version, i)
            &&& Some(files.version) == candidate(file_prefix(component_id), file_names, i)
            &&& files.wasm_file@ == file_names[i]@
            &&& files.properties_file@ == base_name(file_names[i]@) + json_extension()
        }
}

/// No file of a component could be picked in a directory, and the error
/// says so.
pub open spec fn nothing_picked(
    component_id: ComponentId,
    file_names: Seq<String>,
    forced_version: Option<ComponentVersion>,
    e: GolemError,
) -> bool {
    &&& no_choice(file_prefix(component_id), file_names, forced_version)
    &&& e@ == crate::error::GolemErrorView::GetLatestVersionOfComponentFailed {
        component_id,
        reason: not_found_reason(forced_version),
    }
}

/// The component service in front of a local directory.
#[derive(Debug)]
pub struct ComponentServiceLocalFileSystem<A, E> {
    pub root: String,
    pub component_cache: Cache<A>,
    pub component_metadata_cache: Cache<ComponentMetadata<E>>,
}

impl<A, E> ComponentServiceLocalFileSystem<A, E> {
    /// Both caches are in a state that they can be in.
    pub open spec fn wf(&self) -> bool {
        self.component_cache.wf() && self.component_metadata_cache.wf()
    }

    /// A service with two empty caches.
    pub fn new(
        root: String,
        max_capacity: usize,
        max_metadata_capacity: usize,
        time_to_idle: u64,
    ) -> (r: Self)
        ensures
            r.wf(),
            r.root@ == root@,
            r.component_cache@ == (CacheState::<A> {
                capacity: max_capacity,
                time_to_idle,
                entries: Seq::empty(),
            }),
            r.component_metadata_cache@ == (CacheState::<ComponentMetadata<E>> {
                capacity: max_metadata_capacity,
                time_to_idle,
                entries: Seq::empty(),
            }),
    {
        ComponentServiceLocalFileSystem {
            root,
            component_cache: create_component_cache(max_capacity, time_to_idle),
            component_metadata_cache: create_component_metadata_cache(
                max_metadata_capacity,
                time_to_idle,
            ),
        }
    }

    /// Picks the files of a component among the names of the directory.
    pub fn find_component_files(
        &self,
        component_id: &ComponentId,
        file_names: &Vec<String>,
        forced_version: Option<ComponentVersion>,
    ) -> (r: Result<ComponentFiles, GolemError>)
        ensures
            match r {
                Ok(files) => picked(*component_id, file_names@, forced_version, files),
                Err(e) => nothing_picked(*component_id, file_names@, forced_version, e),
            },
    {
        find_component_files(component_id, file_names, forced_version)
    }

    /// Decides how a call for a compiled component proceeds: the files of
    /// the version are picked among the names of the directory, then the
    /// cache of components is asked. The caller that is told to compute
    /// reads the bytes in one try. Without files the call fails and the
    /// cache is left as it is.
    pub fn get(
        &mut self,
        component_id: &ComponentId,
        file_names: &Vec<String>,
        component_version: ComponentVersion,
        now: u64,
    ) -> (r: Result<(ComponentFiles, ComponentLookup<A>), GolemError>)
        requires
            old(self).wf(),
        ensures
            final(self).wf(),
            final(self).root == old(self).root,
            final(self).component_metadata_cache == old(self).component_metadata_cache,
            match r {
                Ok((files, lookup)) => {
                    let key = ComponentKey {
                        component_id: *component_id,
                        component_version: files.version,
                    };
                    &&& picked(*component_id, file_names@, Some(component_version), files)
                    &&& files.version == component_version
                    &&& final(self).component_cache@ == request_step(
                        old(self).component_cache@,
                        key,
                        now,
                    ).0
                    &&& component_lookup_matches(
                        lookup,
                        request_step(old(self).component_cache@, key, now).1,
                        key,
                        single_try(),
                    )
                },
                Err(e) => {
                    &&& nothing_picked(*component_id, file_names@, Some(component_version), e)
                    &&& final(self).component_cache == old(self).component_cache
                },
            },
    {
        let files = find_component_files(component_id, file_names, Some(component_version))?;
        let key = ComponentKey { component_id: *component_id, component_version: files.version };
        let retries = RetryConfig { max_attempts: 0, min_delay: 0, max_delay: 0, multiplier: 0 };
        let lookup = lookup_component(&mut self.component_cache, key, retries, now);
        Ok((files, lookup))
    }

    /// Decides how a call for metadata proceeds: the files of the wanted
    /// version, or of the highest one, are picked among the names of the
    /// directory, then the cache of metadata is asked for that version.
    /// Without files the call fails and the cache is left as it is.
    pub fn get_metadata(
        &mut self,
        component_id: &ComponentId,
        file_names: &Vec<String>,
        forced_version: Option<ComponentVersion>,
        now: u64,
    ) -> (r: Result<(ComponentFiles, Lookup), GolemError>)
        requires
            old(self).wf(),
        ensures
            final(self).wf(),
            final(self).root == old(self).root,
            final(self).component_cache == old(self).component_cache,
            match r {
                Ok((files, lookup)) => {
                    let key = ComponentKey {
                        component_id: *component_id,
                        component_version: files.version,
                    };
                    &&& picked(*component_id, file_names@, forced_version, files)
                    &&& (final(self).component_metadata_cache@, lookup) == request_step(
                        old(self).component_metadata_cache@,
                        key,
                        now,
                    )
                },
                Err(e) => {
                    &&& nothing_picked(*component_id, file_names@, forced_version, e)
                    &&& final(self).component_metadata_cache == old(self).component_metadata_cache
                },
            },
    {
        let files = find_component_files(component_id, file_names, forced_version)?;
        let key = ComponentKey { component_id: *component_id, component_version: files.version };
        let lookup = self.component_metadata_cache.request(key, now);
        Ok((files, lookup))
    }
}

/// A component service that was set up.
#[derive(Debug)]
pub enum ConfiguredService<A, E> {
    Grpc(ComponentServiceGrpc<A, E>),
    Local(ComponentServiceLocalFileSystem<A, E>),
}

/// Whether a configuration can be used: the access token of a remote
/// registry has to be the text of an identifier.
pub open spec fn usable(config: ComponentServiceConfig) -> bool {
    config matches ComponentServiceConfig::Grpc(c) ==> uuid_of_text(c.access_token@) is Some
}

/// The service that a configuration asks for.
pub open spec fn configured_as<A, E>(
    config: ComponentServiceConfig,
    cache_config: ComponentCacheConfig,
    service: ConfiguredService<A, E>,
) -> bool {
    match config {
        ComponentServiceConfig::Grpc(c) => {
            &&& service matches ConfiguredService::Grpc(s)
            &&& s.wf()
            &&& Some(s.access_token) == uuid_of_text(c.access_token@)
            &&& s.retry_config == c.retries
            &&& s.max_component_size == c.max_component_size
            &&& s.component_cache@ == (CacheState::<A> {
                capacity: cache_config.max_capacity,
                time_to_idle: cache_config.time_to_idle,
                entries: Seq::empty(),
            })
            &&& s.component_metadata_cache@ == (CacheState::<ComponentMetadata<E>> {
                capacity: cache_config.max_metadata_capacity,
                time_to_idle: cache_config.time_to_idle,
                entries: Seq::empty(),
            })
        },
        ComponentServiceConfig::Local(c) => {
            &&& service matches ConfiguredService::Local(s)
            &&& s.wf()
            &&& s.root@ == c.root@
            &&& s.component_cache@ == (CacheState::<A> {
                capacity: cache_config.max_capacity,
                time_to_idle: cache_config.time_to_idle,
                entries: Seq::empty(),
            })
            &&& s.component_metadata_cache@ == (CacheState::<ComponentMetadata<E>> {
                capacity: cache_config.max_metadata_capacity,
                time_to_idle: cache_config.time_to_idle,
                entries: Seq::empty(),
            })
        },
    }
}

/// Sets up the component service that a usable configuration asks for.
pub fn configured<A, E>(config: &ComponentServiceConfig, cache_config: &ComponentCacheConfig) -> (r:
    ConfiguredService<A, E>)
    requires
        usable(*config),
    ensures
        configured_as(*config, *cache_config, r),
{
    match config {
        ComponentServiceConfig::Grpc(c) => {
            let access_token = match ComponentId::parse(c.access_token.as_str()) {
                Some(id) => id.0,
                None => vstd::pervasive::unreached(),
            };
            ConfiguredService::Grpc(
                ComponentServiceGrpc::new(
                    access_token,
                    cache_config.max_capacity,
                    cache_config.max_metadata_capacity,
                    cache_config.time_to_idle,
                    c.retries,
                    c.max_component_size,
                ),
            )
        },
        ComponentServiceConfig::Local(c) => ConfiguredService::Local(
            ComponentServiceLocalFileSystem::new(
                c.root.clone(),
                cache_config.max_capacity,
                cache_config.max_metadata_capacity,
                cache_config.time_to_idle,
            ),
        ),
    }
}

/// Whether a configuration can be used.
pub fn is_usable(config: &ComponentServiceConfig) -> (r: bool)
    ensures
        r == usable(*config),
{
    match config {
        ComponentServiceConfig::Grpc(c) => ComponentId::parse(c.access_token.as_str()).is_some(),
        ComponentServiceConfig::Local(_) => true,
    }
}

/// Sets up the component service that a configuration asks for; none
/// where the configuration cannot be used.
pub fn try_configured<A, E>(
    config: &ComponentServiceConfig,
    cache_config: &ComponentCacheConfig,
) -> (r: Option<ConfiguredService<A, E>>)
    ensures
        r is Some == usable(*config),
        r matches Some(service) ==> configured_as(*config, *cache_config, service),
{
    if is_usable(config) {
        Some(configured(config, cache_config))
    } else {
        None
    }
}

/// The metadata of a local component states the version that was asked
/// for and the size that the file of bytes was found to have.
pub proof fn lemma_local_metadata_as_asked<E>(
    component_id: ComponentId,
    file_names: Seq<String>,
    component_version: ComponentVersion,
    files: ComponentFiles,
    size: u64,
    analysis: Option<(Vec<LinearMemory>, Vec<E>)>,
    properties: Option<ComponentProperties>,
    metadata: ComponentMetadataView<E>,
)
    requires
        picked(component_id, file_names, Some(component_version), files),
        local_metadata(component_id, files.version, size, analysis, properties) == Ok::<
            ComponentMetadataView<E>,
            crate::error::GolemErrorView,
        >(metadata),
    ensures
        metadata.version == component_version,
        metadata.size == size,
{
}

/// Metadata of the latest version is kept under the key of the version
/// that it states: unless the cache has no room at all, metadata that was
/// stored is found under that key afterwards.
pub proof fn lemma_latest_stored_under_its_version<E>(
    s: CacheState<ComponentMetadata<E>>,
    component_id: ComponentId,
    metadata: ComponentMetadata<E>,
    now: u64,
)
    requires
        s.wf(),
        s.capacity > 0,
        latest_step(
            s,
            ComponentKey { component_id, component_version: metadata.version },
            metadata,
            now,
        ).1 is Stored,
    ensures
        ({
            let key = ComponentKey { component_id, component_version: metadata.version };
            let after = latest_step(s, key, metadata, now).0;
            &&& is_cached(after.entries, key)
            &&& after.entries[index_of(after.entries, key)].slot->value == metadata
            &&& after.entries[index_of(after.entries, key)].slot->value.version
                == key.component_version
        }),
{
    let key = ComponentKey { component_id, component_version: metadata.version };
    lemma_request(s, key, now);
    lemma_stored_value_hits(request_step(s, key, now).0, key, metadata, now, now);
}

} // verus!
