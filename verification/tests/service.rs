use component_service::cache::{Abandon, Completion, Lookup};
use component_service::download::DownloadFrame;
use component_service::error::GolemError;
use component_service::metadata::ComponentMetadata;
use component_service::metadata_fetch::{MetadataAction, MetadataEvent};
use component_service::model::{ComponentId, ComponentKey, ComponentType};
use component_service::producer::{ProducerAction, ProducerEvent};
use component_service::registry::{
    ComponentView, GetComponentMetadataResponse, VersionedComponentId,
};
use component_service::retry::RetryConfig;
use component_service::service::{
    configured, create_component_cache, create_component_metadata_cache, is_usable,
    try_configured, ComponentCacheConfig, ComponentLookup, ComponentServiceConfig,
    ComponentServiceGrpc, ComponentServiceGrpcConfig, ComponentServiceLocalConfig,
    ComponentServiceLocalFileSystem, ConfiguredService, LatestOutcome, MetadataLookup,
    SWEEP_PERIOD_MILLIS,
};

const X: ComponentId = ComponentId(0xaaaaaaaa_aaaa_aaaa_aaaa_aaaaaaaaaaaa);

fn retries() -> RetryConfig {
    RetryConfig { max_attempts: 3, min_delay: 10, max_delay: 1000, multiplier: 2 }
}

fn remote() -> ComponentServiceGrpc<String, String> {
    ComponentServiceGrpc::new(0x1234, 8, 8, 1000, retries(), 1 << 20)
}

fn key(version: u64) -> ComponentKey {
    ComponentKey { component_id: X, component_version: version }
}

fn metadata(version: u64) -> ComponentMetadata<String> {
    ComponentMetadata {
        version,
        size: 100 + version,
        memories: vec![],
        exports: vec![],
        component_type: ComponentType::Durable,
        files: vec![],
    }
}

fn answer(version: u64) -> GetComponentMetadataResponse<String> {
    GetComponentMetadataResponse::Success(Some(ComponentView {
        versioned_component_id: Some(VersionedComponentId { component_id: Some(X), version }),
        component_size: 100 + version,
        component_type: 0,
        metadata: None,
        files: vec![],
    }))
}

/// Runs a computation against a registry whose downloads give `bytes`, and
/// a compiler that accepts everything but empty input. Counts the fetches
/// and the compilations.
fn compute(
    first: ProducerAction<String>,
    mut producer: component_service::producer::Producer,
    bytes: Vec<u8>,
    fetched: &mut u32,
    compiled: &mut u32,
) -> Result<String, GolemError> {
    let mut action = first;
    loop {
        action = match action {
            ProducerAction::ProbeStore => producer.step(ProducerEvent::StoreProbed(Ok(None))),
            ProducerAction::Fetch => {
                *fetched += 1;
                producer.step(ProducerEvent::Downloaded(Ok(vec![DownloadFrame::SuccessChunk(
                    bytes.clone(),
                )])))
            }
            ProducerAction::Pause { .. } => producer.step(ProducerEvent::PauseOver),
            ProducerAction::Compile { bytes } => {
                *compiled += 1;
                if bytes.is_empty() {
                    producer.step(ProducerEvent::Compiled(Err("malformed".to_string())))
                } else {
                    producer.step(ProducerEvent::Compiled(Ok(format!("compiled {:?}", bytes))))
                }
            }
            ProducerAction::Store { artifact } => {
                producer.step(ProducerEvent::Stored { artifact, result: Ok(()) })
            }
            ProducerAction::Finish(outcome) => return outcome,
        };
    }
}

#[test]
fn cold_hit_single_flight() {
    let mut service = remote();
    let mut fetched = 0;
    let mut compiled = 0;
    let mut leaders = vec![];
    let mut waiting = 0;
    for _ in 0..64 {
        match service.get(&X, 7, 0) {
            ComponentLookup::Compute { producer, first } => leaders.push((producer, first)),
            ComponentLookup::Await => waiting += 1,
            ComponentLookup::Cached => panic!("nothing is cached yet"),
        }
    }
    assert_eq!(leaders.len(), 1);
    assert_eq!(waiting, 63);
    let (producer, first) = leaders.pop().unwrap();
    let artifact = compute(first, producer, vec![1, 2, 3], &mut fetched, &mut compiled).unwrap();
    assert_eq!(
        service.component_cache.complete(key(7), Some(artifact.clone()), 1),
        Completion::Stored { waiters: 63, evicted: None }
    );
    assert_eq!(fetched, 1);
    assert_eq!(compiled, 1);
    // All 64 callers are handed the one artifact.
    for _ in 0..64 {
        assert_eq!(service.component_cache.get(&key(7)), Some(&artifact));
    }
    assert!(matches!(service.get(&X, 7, 2), ComponentLookup::Cached));
    assert_eq!(fetched, 1);
    assert_eq!(service.component_cache.len(), 1);
}

#[test]
fn compile_failure_does_not_poison() {
    let mut service = remote();
    let mut fetched = 0;
    let mut compiled = 0;
    let (producer, first) = match service.get(&X, 7, 0) {
        ComponentLookup::Compute { producer, first } => (producer, first),
        other => panic!("unexpected {:?}", other),
    };
    let outcome = compute(first, producer, vec![], &mut fetched, &mut compiled);
    assert_eq!(
        outcome,
        Err(GolemError::ComponentParseFailed {
            component_id: X,
            component_version: 7,
            reason: "malformed".to_string(),
        })
    );
    assert_eq!(
        service.component_cache.complete(key(7), outcome.ok(), 1),
        Completion::Failed { waiters: 0 }
    );
    assert_eq!(service.component_cache.len(), 0);

    let (producer, first) = match service.get(&X, 7, 2) {
        ComponentLookup::Compute { producer, first } => (producer, first),
        other => panic!("unexpected {:?}", other),
    };
    let outcome = compute(first, producer, vec![9], &mut fetched, &mut compiled);
    assert_eq!(outcome, Ok("compiled [9]".to_string()));
    assert_eq!(
        service.component_cache.complete(key(7), outcome.ok(), 3),
        Completion::Stored { waiters: 0, evicted: None }
    );
    assert_eq!(service.component_cache.len(), 1);
    assert_eq!(service.component_cache.get(&key(7)), Some(&"compiled [9]".to_string()));
    assert_eq!(fetched, 2);
    assert_eq!(compiled, 2);
}

fn fetch_latest(service: &mut ComponentServiceGrpc<String, String>, latest: u64, now: u64) -> u64 {
    let (mut fetch, first) = match service.get_metadata(&X, None, now) {
        MetadataLookup::FetchLatest { fetch, first } => (fetch, first),
        other => panic!("unexpected {:?}", other),
    };
    assert!(matches!(first, MetadataAction::Fetch));
    let fetched = match fetch.step(MetadataEvent::Answered(Ok(answer(latest)))) {
        MetadataAction::Finish(Ok(m)) => m,
        other => panic!("unexpected {:?}", other),
    };
    let version = fetched.version;
    match service.cache_latest(&X, fetched, now) {
        LatestOutcome::Stored { waiters: 0, evicted: None } | LatestOutcome::Existing => {}
        other => panic!("unexpected {:?}", other),
    }
    service.component_metadata_cache.get(&key(version)).unwrap().version
}

#[test]
fn latest_bypasses_the_cache() {
    let mut service = remote();
    assert_eq!(fetch_latest(&mut service, 5, 0), 5);
    assert!(service.component_metadata_cache.contains(&key(5)));
    assert_eq!(service.component_metadata_cache.len(), 1);
    // The registry has moved on: the next call for the latest sees it.
    assert_eq!(fetch_latest(&mut service, 6, 1), 6);
    assert!(service.component_metadata_cache.contains(&key(5)));
    assert!(service.component_metadata_cache.contains(&key(6)));
    assert_eq!(service.component_metadata_cache.len(), 2);
    // A call for a given version is served from the cache.
    assert!(matches!(
        service.get_metadata(&X, Some(5), 2),
        MetadataLookup::Cached { key: k } if k == key(5)
    ));
}

#[test]
fn cached_metadata_stands_against_fetched_latest() {
    let mut service = remote();
    let mut first = metadata(5);
    first.size = 1;
    assert_eq!(
        service.cache_latest(&X, first, 0),
        LatestOutcome::Stored { waiters: 0, evicted: None }
    );
    let mut second = metadata(5);
    second.size = 2;
    assert_eq!(service.cache_latest(&X, second, 1), LatestOutcome::Existing);
    assert_eq!(service.component_metadata_cache.get(&key(5)).unwrap().size, 1);
}

#[test]
fn latest_waits_for_a_fetch_in_flight() {
    let mut service = remote();
    assert!(matches!(
        service.get_metadata(&X, Some(5), 0),
        MetadataLookup::Fetch { key: k, .. } if k == key(5)
    ));
    assert!(matches!(
        service.get_metadata(&X, Some(5), 0),
        MetadataLookup::Await { key: k } if k == key(5)
    ));
    assert_eq!(service.cache_latest(&X, metadata(5), 1), LatestOutcome::Await);
    assert_eq!(
        service.component_metadata_cache.complete(key(5), Some(metadata(5)), 2),
        Completion::Stored { waiters: 2, evicted: None }
    );
}

#[test]
fn latest_takes_a_leaderless_fetch_over() {
    let mut service = remote();
    assert!(matches!(service.get_metadata(&X, Some(5), 0), MetadataLookup::Fetch { .. }));
    assert!(matches!(service.get_metadata(&X, Some(5), 0), MetadataLookup::Await { .. }));
    assert_eq!(service.component_metadata_cache.abandon(key(5)), Abandon::Promoted);
    // The fetched metadata goes to the caller that still waits.
    assert_eq!(
        service.cache_latest(&X, metadata(5), 1),
        LatestOutcome::Stored { waiters: 1, evicted: None }
    );
    assert!(service.component_metadata_cache.contains(&key(5)));
}

#[test]
fn full_metadata_cache_evicts_when_latest_is_stored() {
    let mut service: ComponentServiceGrpc<String, String> =
        ComponentServiceGrpc::new(0, 1, 1, 1000, retries(), 0);
    assert_eq!(
        service.cache_latest(&X, metadata(1), 0),
        LatestOutcome::Stored { waiters: 0, evicted: None }
    );
    assert_eq!(
        service.cache_latest(&X, metadata(2), 1),
        LatestOutcome::Stored { waiters: 0, evicted: Some(key(1)) }
    );
    assert!(!service.component_metadata_cache.contains(&key(1)));
    assert!(service.component_metadata_cache.contains(&key(2)));
}

#[test]
fn services_start_with_empty_caches() {
    let service = remote();
    assert_eq!(service.access_token, 0x1234);
    assert_eq!(service.retry_config, retries());
    assert_eq!(service.max_component_size, 1 << 20);
    assert_eq!(service.component_cache.len(), 0);
    assert_eq!(service.component_cache.capacity(), 8);
    assert_eq!(service.component_metadata_cache.time_to_idle(), 1000);
    let cache = create_component_cache::<u8>(3, 4);
    assert_eq!((cache.capacity(), cache.time_to_idle(), cache.len()), (3, 4, 0));
    let cache = create_component_metadata_cache::<u8>(5, 6);
    assert_eq!((cache.capacity(), cache.time_to_idle(), cache.len()), (5, 6, 0));
    assert_eq!(SWEEP_PERIOD_MILLIS, 60_000);
}

fn directory() -> Vec<String> {
    [
        "aaaaaaaa-aaaa-aaaa-aaaa-aaaaaaaaaaaa-3.wasm",
        "aaaaaaaa-aaaa-aaaa-aaaa-aaaaaaaaaaaa-3.json",
        "aaaaaaaa-aaaa-aaaa-aaaa-aaaaaaaaaaaa-7.wasm",
        "aaaaaaaa-aaaa-aaaa-aaaa-aaaaaaaaaaaa-7.json",
    ]
    .iter()
    .map(|s| s.to_string())
    .collect()
}

fn local() -> ComponentServiceLocalFileSystem<String, String> {
    ComponentServiceLocalFileSystem::new("/var/components".to_string(), 4, 4, 1000)
}

#[test]
fn local_discovery() {
    let mut service = local();
    assert_eq!(service.root, "/var/components");
    let (files, lookup) = service.get_metadata(&X, &directory(), None, 0).unwrap();
    assert_eq!(files.version, 7);
    assert_eq!(lookup, Lookup::Lead);
    let (files, lookup) = service.get_metadata(&X, &directory(), Some(3), 0).unwrap();
    assert_eq!(files.version, 3);
    assert_eq!(files.properties_file, "aaaaaaaa-aaaa-aaaa-aaaa-aaaaaaaaaaaa-3.json");
    assert_eq!(lookup, Lookup::Lead);
    assert_eq!(
        service.get_metadata(&X, &directory(), Some(5), 0),
        Err(GolemError::GetLatestVersionOfComponentFailed {
            component_id: X,
            reason: "Could not find any component with the given id and version".to_string(),
        })
    );
    assert_eq!(service.find_component_files(&X, &directory(), None).unwrap().version, 7);
    // A second call for the latest version waits for the first.
    let (_, lookup) = service.get_metadata(&X, &directory(), None, 1).unwrap();
    assert_eq!(lookup, Lookup::Wait);
    assert_eq!(
        service.component_metadata_cache.complete(key(7), Some(metadata(7)), 2),
        Completion::Stored { waiters: 1, evicted: None }
    );
    let (_, lookup) = service.get_metadata(&X, &directory(), Some(7), 3).unwrap();
    assert_eq!(lookup, Lookup::Hit);
    assert_eq!(service.component_metadata_cache.get(&key(7)).unwrap().version, 7);
}

#[test]
fn local_component_is_read_in_one_try() {
    let mut service = local();
    let (files, lookup) = service.get(&X, &directory(), 3, 0).unwrap();
    assert_eq!(files.wasm_file, "aaaaaaaa-aaaa-aaaa-aaaa-aaaaaaaaaaaa-3.wasm");
    let (mut producer, first) = match lookup {
        ComponentLookup::Compute { producer, first } => (producer, first),
        other => panic!("unexpected {:?}", other),
    };
    assert!(matches!(first, ProducerAction::ProbeStore));
    assert!(matches!(
        producer.step::<String>(ProducerEvent::StoreProbed(Ok(None))),
        ProducerAction::Fetch
    ));
    let action = producer.step::<String>(ProducerEvent::BytesRead(Ok(vec![7, 7])));
    assert!(matches!(action, ProducerAction::Compile { bytes } if bytes == vec![7, 7]));
    assert!(matches!(service.get(&X, &directory(), 3, 1), Ok((_, ComponentLookup::Await))));
    assert!(matches!(
        service.get(&X, &directory(), 4, 1),
        Err(GolemError::GetLatestVersionOfComponentFailed { .. })
    ));
    assert_eq!(service.component_cache.len(), 0);
}

fn grpc_config(access_token: &str) -> ComponentServiceConfig {
    ComponentServiceConfig::Grpc(ComponentServiceGrpcConfig {
        url: "http://registry:9090".to_string(),
        access_token: access_token.to_string(),
        retries: retries(),
        max_component_size: 50 << 20,
    })
}

fn cache_config() -> ComponentCacheConfig {
    ComponentCacheConfig { max_capacity: 32, max_metadata_capacity: 16384, time_to_idle: 43_200_000 }
}

#[test]
fn remote_service_is_configured() {
    let config = grpc_config("5c832d93-ff85-4a8f-9803-513950fdfdb1");
    assert!(is_usable(&config));
    match configured::<String, String>(&config, &cache_config()) {
        ConfiguredService::Grpc(service) => {
            assert_eq!(service.access_token, 0x5c832d93_ff85_4a8f_9803_513950fdfdb1);
            assert_eq!(service.retry_config, retries());
            assert_eq!(service.max_component_size, 50 << 20);
            assert_eq!(service.component_cache.capacity(), 32);
            assert_eq!(service.component_metadata_cache.capacity(), 16384);
            assert_eq!(service.component_cache.time_to_idle(), 43_200_000);
        }
        other => panic!("unexpected {:?}", other),
    }
    assert!(matches!(
        try_configured::<String, String>(&config, &cache_config()),
        Some(ConfiguredService::Grpc(_))
    ));
}

#[test]
fn access_token_has_to_be_an_identifier() {
    let config = grpc_config("secret");
    assert!(!is_usable(&config));
    assert!(try_configured::<String, String>(&config, &cache_config()).is_none());
}

#[test]
fn local_service_is_configured() {
    let config =
        ComponentServiceConfig::Local(ComponentServiceLocalConfig { root: "/data".to_string() });
    assert!(is_usable(&config));
    match try_configured::<String, String>(&config, &cache_config()) {
        Some(ConfiguredService::Local(service)) => {
            assert_eq!(service.root, "/data");
            assert_eq!(service.component_cache.capacity(), 32);
            assert_eq!(service.component_metadata_cache.capacity(), 16384);
        }
        other => panic!("unexpected {:?}", other),
    }
}
